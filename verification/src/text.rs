//! Numbers as text: whole numbers in decimal, and hundredths as a decimal
//! number with a point.

use vstd::prelude::*;
use vstd::string::StringExecFns;

verus! {

/// The character of a decimal digit.
pub open spec fn digit_char(digit: nat) -> char {
    if digit == 0 {
        '0'
    } else if digit == 1 {
        '1'
    } else if digit == 2 {
        '2'
    } else if digit == 3 {
        '3'
    } else if digit == 4 {
        '4'
    } else if digit == 5 {
        '5'
    } else if digit == 6 {
        '6'
    } else if digit == 7 {
        '7'
    } else if digit == 8 {
        '8'
    } else {
        '9'
    }
}

/// A whole number in decimal, without leading zeros.
pub open spec fn decimal(n: nat) -> Seq<char>
    decreases n,
{
    if n < 10 {
        seq![digit_char(n)]
    } else {
        decimal(n / 10).push(digit_char(n % 10))
    }
}

/// What follows the whole part where a number of hundredths is written as
/// briefly as can be: nothing for no hundredths, else a point and one digit
/// for whole tenths, two digits for the rest.
pub open spec fn brief_places(hundredths: nat) -> Seq<char> {
    if hundredths % 100 == 0 {
        Seq::<char>::empty()
    } else if hundredths % 10 == 0 {
        seq!['.', digit_char(hundredths % 100 / 10)]
    } else {
        seq!['.', digit_char(hundredths % 100 / 10), digit_char(hundredths % 10)]
    }
}

/// A number of hundredths as a decimal number written as briefly as can be:
/// 400 is `4`, 950 is `9.5`, 413 is `4.13` and 1 is `0.01`.
pub open spec fn decimal_hundredths(hundredths: nat) -> Seq<char> {
    decimal(hundredths / 100) + brief_places(hundredths)
}

/// A number of hundredths as a decimal number with three places, the third
/// of which is always 0: 110448 is `1104.480`.
pub open spec fn decimal_thousandths(hundredths: nat) -> Seq<char> {
    decimal(hundredths / 100) + seq![
        '.',
        digit_char(hundredths % 100 / 10),
        digit_char(hundredths % 10),
        '0',
    ]
}

/// The text of one decimal digit.
pub fn digit_str(digit: u32) -> (text: &'static str)
    requires
        digit < 10,
    ensures
        text@ == seq![digit_char(digit as nat)],
{
    proof {
        reveal_strlit("0");
        reveal_strlit("1");
        reveal_strlit("2");
        reveal_strlit("3");
        reveal_strlit("4");
        reveal_strlit("5");
        reveal_strlit("6");
        reveal_strlit("7");
        reveal_strlit("8");
        reveal_strlit("9");
    }
    let text = if digit == 0 {
        "0"
    } else if digit == 1 {
        "1"
    } else if digit == 2 {
        "2"
    } else if digit == 3 {
        "3"
    } else if digit == 4 {
        "4"
    } else if digit == 5 {
        "5"
    } else if digit == 6 {
        "6"
    } else if digit == 7 {
        "7"
    } else if digit == 8 {
        "8"
    } else {
        "9"
    };
    assert(text@ =~= seq![digit_char(digit as nat)]);
    text
}

/// Writes a whole number in decimal at the end of `out`.
pub fn push_decimal(out: &mut String, n: u32)
    ensures
        final(out)@ == old(out)@ + decimal(n as nat),
    decreases n,
{
    if n >= 10 {
        push_decimal(out, n / 10);
    }
    out.append(digit_str(n % 10));
    assert(out@ =~= old(out)@ + decimal(n as nat));
}

/// Writes a number of hundredths at the end of `out`, as briefly as can be.
pub fn push_decimal_hundredths(out: &mut String, hundredths: u32)
    ensures
        final(out)@ == old(out)@ + decimal_hundredths(hundredths as nat),
{
    push_decimal(out, hundredths / 100);
    let tenths: u32 = hundredths % 100 / 10;
    let rest: u32 = hundredths % 10;
    proof {
        reveal_strlit(".");
    }
    if tenths != 0 || rest != 0 {
        out.append(".");
        out.append(digit_str(tenths));
        if rest != 0 {
            out.append(digit_str(rest));
        }
    }
    assert(out@ =~= old(out)@ + decimal_hundredths(hundredths as nat));
}

/// Writes a number of hundredths at the end of `out`, with three places.
pub fn push_decimal_thousandths(out: &mut String, hundredths: u32)
    ensures
        final(out)@ == old(out)@ + decimal_thousandths(hundredths as nat),
{
    push_decimal(out, hundredths / 100);
    proof {
        reveal_strlit(".");
        reveal_strlit("0");
    }
    out.append(".");
    out.append(digit_str(hundredths % 100 / 10));
    out.append(digit_str(hundredths % 10));
    out.append("0");
    assert(out@ =~= old(out)@ + decimal_thousandths(hundredths as nat));
}

} // verus!
