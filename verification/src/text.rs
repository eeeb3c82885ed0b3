//! Rendering block numbers into the text of protocol error messages.

use vstd::prelude::*;

verus! {

/// The character for a single decimal digit.
pub open spec fn dec_digit(d: int) -> char {
    if d == 0 {
        '0'
    } else if d == 1 {
        '1'
    } else if d == 2 {
        '2'
    } else if d == 3 {
        '3'
    } else if d == 4 {
        '4'
    } else if d == 5 {
        '5'
    } else if d == 6 {
        '6'
    } else if d == 7 {
        '7'
    } else if d == 8 {
        '8'
    } else {
        '9'
    }
}

/// The decimal rendering of a non-negative number, most significant
/// digit first, without leading zeros (`0` renders as "0").
pub open spec fn dec_str(n: int) -> Seq<char>
    recommends
        n >= 0,
    decreases n,
{
    if n < 10 {
        seq![dec_digit(n)]
    } else {
        dec_str(n / 10) + seq![dec_digit(n % 10)]
    }
}

/// The text of the mismatched-block-number protocol error, for example
/// "expected=1, got=5".
pub open spec fn expected_got(expected: int, got: int) -> Seq<char> {
    "expected="@ + dec_str(expected) + ", got="@ + dec_str(got)
}

/// Append the decimal rendering of `n` to `s`.
pub fn push_decimal(s: &mut String, n: u32)
    ensures
        final(s)@ == old(s)@ + dec_str(n as int),
    decreases n,
{
    if n >= 10 {
        push_decimal(s, n / 10);
    }
    let digit: &str = match n % 10 {
        0 => "0",
        1 => "1",
        2 => "2",
        3 => "3",
        4 => "4",
        5 => "5",
        6 => "6",
        7 => "7",
        8 => "8",
        _ => "9",
    };
    proof {
        reveal_strlit("0");
        reveal_strlit("1");
        reveal_strlit("2");
        reveal_strlit("3");
        reveal_strlit("4");
        reveal_strlit("5");
        reveal_strlit("6");
        reveal_strlit("7");
        reveal_strlit("8");
        reveal_strlit("9");
        assert(digit@ =~= seq![dec_digit((n % 10) as int)]);
    }
    s.append(digit);
    proof {
        if n >= 10 {
            assert(dec_str(n as int) == dec_str(n as int / 10) + seq![
                dec_digit(n as int % 10),
            ]);
            assert(n as int / 10 == (n / 10) as int);
            assert(n as int % 10 == (n % 10) as int);
            assert(s@ =~= old(s)@ + dec_str(n as int));
        } else {
            assert(dec_str(n as int) == seq![dec_digit(n as int)]);
            assert(s@ =~= old(s)@ + dec_str(n as int));
        }
    }
}

/// Build the text of the mismatched-block-number protocol error.
pub fn expected_got_message(expected: u32, got: u16) -> (s: String)
    ensures
        s@ == expected_got(expected as int, got as int),
{
    let mut s = String::new();
    s.append("expected=");
    push_decimal(&mut s, expected);
    s.append(", got=");
    push_decimal(&mut s, got as u32);
    proof {
        assert(s@ =~= expected_got(expected as int, got as int));
    }
    s
}

} // verus!
