//! Decimal text rendering, verified against a recursive specification.

use vstd::prelude::*;
use vstd::string::StringExecFns;

verus! {

/// The decimal digit character for `d` (valid for `d < 10`).
pub open spec fn dec_digit(d: nat) -> char {
    if d == 0 {
        '0'
    } else if d == 1 {
        '1'
    } else if d == 2 {
        '2'
    } else if d == 3 {
        '3'
    } else if d == 4 {
        '4'
    } else if d == 5 {
        '5'
    } else if d == 6 {
        '6'
    } else if d == 7 {
        '7'
    } else if d == 8 {
        '8'
    } else {
        '9'
    }
}

/// The decimal rendering of a natural number.
pub open spec fn dec_str(n: nat) -> Seq<char>
    decreases n,
{
    if n < 10 {
        seq![dec_digit(n)]
    } else {
        dec_str(n / 10) + seq![dec_digit(n % 10)]
    }
}

/// The string form of a single decimal digit.
fn digit_str(d: u8) -> (r: &'static str)
    requires
        d < 10,
    ensures
        r@ == seq![dec_digit(d as nat)],
{
    proof {
        reveal_strlit("0");
        reveal_strlit("1");
        reveal_strlit("2");
        reveal_strlit("3");
        reveal_strlit("4");
        reveal_strlit("5");
        reveal_strlit("6");
        reveal_strlit("7");
        reveal_strlit("8");
        reveal_strlit("9");
    }
    let r: &'static str = match d {
        0 => "0",
        1 => "1",
        2 => "2",
        3 => "3",
        4 => "4",
        5 => "5",
        6 => "6",
        7 => "7",
        8 => "8",
        _ => "9",
    };
    proof {
        assert(r@ =~= seq![dec_digit(d as nat)]);
    }
    r
}

/// Render an unsigned byte in decimal.
pub fn u8_dec_string(n: u8) -> (r: String)
    ensures
        r@ == dec_str(n as nat),
{
    let mut s = String::new();
    if n >= 100 {
        s.append(digit_str(n / 100));
    }
    if n >= 10 {
        s.append(digit_str((n / 10) % 10));
    }
    s.append(digit_str(n % 10));
    proof {
        if n < 10 {
            assert(s@ =~= dec_str(n as nat));
        } else if n < 100 {
            assert(dec_str(n as nat) == dec_str(n as nat / 10) + seq![dec_digit(n as nat % 10)]);
            assert(n as nat / 10 < 10);
            assert(s@ =~= dec_str(n as nat));
        } else {
            assert(dec_str(n as nat) == dec_str(n as nat / 10) + seq![dec_digit(n as nat % 10)]);
            assert(dec_str(n as nat / 10) == dec_str(n as nat / 10 / 10) + seq![
                dec_digit(n as nat / 10 % 10),
            ]);
            assert(n as nat / 10 / 10 == n as nat / 100);
            assert(n as nat / 100 < 10);
            assert(s@ =~= dec_str(n as nat));
        }
    }
    s
}

/// Render a signed byte in decimal, with a leading minus sign when
/// negative.
pub fn i8_dec_string(n: i8) -> (r: String)
    ensures
        n >= 0 ==> r@ == dec_str(n as nat),
        n < 0 ==> r@ == seq!['-'] + dec_str((-(n as int)) as nat),
{
    if n >= 0 {
        u8_dec_string(n as u8)
    } else {
        proof {
            reveal_strlit("-");
        }
        let mut s = String::new();
        s.append("-");
        let wide: i16 = n as i16;
        let mag: u8 = (0i16 - wide) as u8;
        let ds = u8_dec_string(mag);
        s.append(ds.as_str());
        proof {
            assert(s@ =~= seq!['-'] + dec_str((-(n as int)) as nat));
        }
        s
    }
}

/// Render an unsigned machine word in decimal.
pub fn usize_dec_string(n: usize) -> (r: String)
    ensures
        r@ == dec_str(n as nat),
    decreases n,
{
    if n < 10 {
        let mut s = String::new();
        s.append(digit_str(n as u8));
        proof {
            assert(s@ =~= dec_str(n as nat));
        }
        s
    } else {
        let mut s = usize_dec_string(n / 10);
        s.append(digit_str((n % 10) as u8));
        proof {
            assert(s@ =~= dec_str(n as nat));
        }
        s
    }
}

} // verus!
