//! Text forms of numbers, as the frames print them: decimal numbers and bytes in
//! hexadecimal with a `0x` prefix and two upper-case digits.
use vstd::prelude::*;
use vstd::string::StringExecFns;

verus! {

/// The decimal digit character for `d`.
pub open spec fn digit_char(d: int) -> char {
    (48 + d) as char
}

/// The upper-case hexadecimal digit character for `d`.
pub open spec fn hex_char(d: int) -> char {
    if d < 10 {
        (48 + d) as char
    } else {
        (55 + d) as char
    }
}

/// The decimal form of a byte, without leading zeros.
pub open spec fn spec_decimal(n: u8) -> Seq<char> {
    if n < 10 {
        seq![digit_char(n as int)]
    } else if n < 100 {
        seq![digit_char((n / 10) as int), digit_char((n % 10) as int)]
    } else {
        seq![
            digit_char((n / 100) as int),
            digit_char(((n / 10) % 10) as int),
            digit_char((n % 10) as int),
        ]
    }
}

/// The hexadecimal form of a byte: `0x` and two upper-case digits.
pub open spec fn spec_hex(n: u8) -> Seq<char> {
    seq!['0', 'x', hex_char((n / 16) as int), hex_char((n % 16) as int)]
}

/// The one-character string of a decimal digit.
fn digit_str(d: u8) -> (res: &'static str)
    requires
        d < 10,
    ensures
        res@ == seq![digit_char(d as int)],
{
    proof {
        reveal_strlit("0");
        reveal_strlit("1");
        reveal_strlit("2");
        reveal_strlit("3");
        reveal_strlit("4");
        reveal_strlit("5");
        reveal_strlit("6");
        reveal_strlit("7");
        reveal_strlit("8");
        reveal_strlit("9");
    }
    match d {
        0 => "0",
        1 => "1",
        2 => "2",
        3 => "3",
        4 => "4",
        5 => "5",
        6 => "6",
        7 => "7",
        8 => "8",
        _ => "9",
    }
}

/// The one-character string of an upper-case hexadecimal digit.
fn hex_digit_str(d: u8) -> (res: &'static str)
    requires
        d < 16,
    ensures
        res@ == seq![hex_char(d as int)],
{
    if d < 10 {
        digit_str(d)
    } else {
        proof {
            reveal_strlit("A");
            reveal_strlit("B");
            reveal_strlit("C");
            reveal_strlit("D");
            reveal_strlit("E");
            reveal_strlit("F");
        }
        match d {
            10 => "A",
            11 => "B",
            12 => "C",
            13 => "D",
            14 => "E",
            _ => "F",
        }
    }
}

/// Appends the decimal form of a byte.
pub fn push_decimal(s: &mut String, n: u8)
    ensures
        final(s)@ == old(s)@ + spec_decimal(n),
{
    if n < 10 {
        s.append(digit_str(n));
    } else if n < 100 {
        s.append(digit_str(n / 10));
        s.append(digit_str(n % 10));
    } else {
        s.append(digit_str(n / 100));
        s.append(digit_str((n / 10) % 10));
        s.append(digit_str(n % 10));
    }
    assert(s@ =~= old(s)@ + spec_decimal(n));
}

/// Appends the hexadecimal form of a byte: `0x` and two upper-case digits.
pub fn push_hex(s: &mut String, n: u8)
    ensures
        final(s)@ == old(s)@ + spec_hex(n),
{
    proof {
        reveal_strlit("0x");
    }
    s.append("0x");
    s.append(hex_digit_str(n / 16));
    s.append(hex_digit_str(n % 16));
    assert(s@ =~= old(s)@ + spec_hex(n));
}

} // verus!
