//! The canonical textual form `[x,y]` of a complex value, for logging and
//! test observability, with the decimal rendering of the parts written out
//! and proved rather than taken on trust.

use vstd::prelude::*;
use vstd::string::StringExecFns;
use crate::complex::Complex;

verus! {

/// The character for one decimal digit.
pub open spec fn digit_char(d: int) -> char {
    if d == 0 {
        '0'
    } else if d == 1 {
        '1'
    } else if d == 2 {
        '2'
    } else if d == 3 {
        '3'
    } else if d == 4 {
        '4'
    } else if d == 5 {
        '5'
    } else if d == 6 {
        '6'
    } else if d == 7 {
        '7'
    } else if d == 8 {
        '8'
    } else {
        '9'
    }
}

/// The decimal digits of `n`, most significant first, no leading zeros
/// except for zero itself.
pub open spec fn dec_digits(n: nat) -> Seq<char>
    decreases n,
{
    if n < 10 {
        seq![digit_char(n as int)]
    } else {
        dec_digits(n / 10) + seq![digit_char((n % 10) as int)]
    }
}

/// The decimal form of an integer: a leading minus sign when negative.
pub open spec fn int_text(x: int) -> Seq<char> {
    if x < 0 {
        seq!['-'] + dec_digits((-x) as nat)
    } else {
        dec_digits(x as nat)
    }
}

/// The canonical form of a complex value: `[x,y]`.
pub open spec fn complex_text(c: (int, int)) -> Seq<char> {
    seq!['['] + int_text(c.0) + seq![','] + int_text(c.1) + seq![']']
}

/// Appends the character of one decimal digit.
fn push_digit(s: &mut String, d: u64)
    requires
        d < 10,
    ensures
        final(s)@ == old(s)@ + seq![digit_char(d as int)],
{
    let t: &str = if d == 0 {
        "0"
    } else if d == 1 {
        "1"
    } else if d == 2 {
        "2"
    } else if d == 3 {
        "3"
    } else if d == 4 {
        "4"
    } else if d == 5 {
        "5"
    } else if d == 6 {
        "6"
    } else if d == 7 {
        "7"
    } else if d == 8 {
        "8"
    } else {
        "9"
    };
    proof {
        reveal_strlit("0");
        reveal_strlit("1");
        reveal_strlit("2");
        reveal_strlit("3");
        reveal_strlit("4");
        reveal_strlit("5");
        reveal_strlit("6");
        reveal_strlit("7");
        reveal_strlit("8");
        reveal_strlit("9");
        assert(t@ =~= seq![digit_char(d as int)]);
    }
    s.append(t);
}

/// Appends the decimal digits of `n`.
fn push_decimal(s: &mut String, n: u64)
    ensures
        final(s)@ == old(s)@ + dec_digits(n as nat),
    decreases n,
{
    if n >= 10 {
        push_decimal(s, n / 10);
    }
    push_digit(s, n % 10);
    proof {
        if n >= 10 {
            assert(final(s)@ =~= old(s)@ + dec_digits(n as nat));
        }
    }
}

/// Appends the decimal form of `v`, sign included.
fn push_integer(s: &mut String, v: i64)
    ensures
        final(s)@ == old(s)@ + int_text(v as int),
{
    if v < 0 {
        s.append("-");
        proof {
            reveal_strlit("-");
            assert(("-")@ =~= seq!['-']);
        }
        let m = (-(v as i128)) as u64;
        push_decimal(s, m);
        proof {
            assert(final(s)@ =~= old(s)@ + int_text(v as int));
        }
    } else {
        push_decimal(s, v as u64);
    }
}

impl Complex {
    /// The canonical textual form `[x,y]` of this value.
    pub fn to_text(&self) -> (s: String)
        ensures
            s@ == complex_text(self@),
    {
        let mut s = String::new();
        proof {
            reveal_strlit("[");
            reveal_strlit(",");
            reveal_strlit("]");
            assert(("[")@ =~= seq!['[']);
            assert((",")@ =~= seq![',']);
            assert(("]")@ =~= seq![']']);
        }
        s.append("[");
        push_integer(&mut s, self.x);
        s.append(",");
        push_integer(&mut s, self.y);
        s.append("]");
        proof {
            assert(s@ =~= complex_text(self@));
        }
        s
    }
}

} // verus!
