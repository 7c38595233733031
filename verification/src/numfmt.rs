//! Decimal rendering of integers and rational coordinates.
//!
//! A coordinate `num / den` is written as a signed decimal with exactly three
//! fractional digits, truncated towards zero, so serialization needs no
//! floating point and has an exact character-level specification.

use vstd::prelude::*;
use crate::frac::Frac;

verus! {

/// The decimal digit character for `d` (0 to 9).
pub open spec fn digit_char(d: int) -> char {
    if d == 0 {
        '0'
    } else if d == 1 {
        '1'
    } else if d == 2 {
        '2'
    } else if d == 3 {
        '3'
    } else if d == 4 {
        '4'
    } else if d == 5 {
        '5'
    } else if d == 6 {
        '6'
    } else if d == 7 {
        '7'
    } else if d == 8 {
        '8'
    } else {
        '9'
    }
}

/// The decimal digits of `n`, most significant first, no sign and no padding.
pub open spec fn dec_str(n: nat) -> Seq<char>
    decreases n,
{
    if n < 10 {
        seq![digit_char(n as int)]
    } else {
        dec_str(n / 10).push(digit_char((n % 10) as int))
    }
}

/// The milli-units of the magnitude of `f`: `(|num| * 1000) / den`,
/// truncated towards zero.
pub open spec fn frac_milli(f: Frac) -> int {
    let a = if f.num < 0 {
        -f.num as int
    } else {
        f.num as int
    };
    (a * 1000) / (f.den as int)
}

/// The decimal rendering of `f`: optional minus sign, the whole part, a dot,
/// and exactly three fractional digits, truncated towards zero.
pub open spec fn frac_str(f: Frac) -> Seq<char> {
    let m = frac_milli(f);
    let r = m % 1000;
    let sign: Seq<char> = if f.num < 0 {
        seq!['-']
    } else {
        Seq::empty()
    };
    sign + dec_str((m / 1000) as nat) + seq!['.'] + seq![
        digit_char(r / 100),
        digit_char((r / 10) % 10),
        digit_char(r % 10),
    ]
}

/// The one-character string for digit `d`.
pub fn digit_str(d: u64) -> (r: &'static str)
    requires
        d < 10,
    ensures
        r@ == seq![digit_char(d as int)],
{
    if d == 0 {
        proof {
            reveal_strlit("0");
            assert("0"@ =~= seq![digit_char(0)]);
        }
        "0"
    } else if d == 1 {
        proof {
            reveal_strlit("1");
            assert("1"@ =~= seq![digit_char(1)]);
        }
        "1"
    } else if d == 2 {
        proof {
            reveal_strlit("2");
            assert("2"@ =~= seq![digit_char(2)]);
        }
        "2"
    } else if d == 3 {
        proof {
            reveal_strlit("3");
            assert("3"@ =~= seq![digit_char(3)]);
        }
        "3"
    } else if d == 4 {
        proof {
            reveal_strlit("4");
            assert("4"@ =~= seq![digit_char(4)]);
        }
        "4"
    } else if d == 5 {
        proof {
            reveal_strlit("5");
            assert("5"@ =~= seq![digit_char(5)]);
        }
        "5"
    } else if d == 6 {
        proof {
            reveal_strlit("6");
            assert("6"@ =~= seq![digit_char(6)]);
        }
        "6"
    } else if d == 7 {
        proof {
            reveal_strlit("7");
            assert("7"@ =~= seq![digit_char(7)]);
        }
        "7"
    } else if d == 8 {
        proof {
            reveal_strlit("8");
            assert("8"@ =~= seq![digit_char(8)]);
        }
        "8"
    } else {
        proof {
            reveal_strlit("9");
            assert("9"@ =~= seq![digit_char(9)]);
        }
        "9"
    }
}

/// Appends the decimal digits of `n` to `out`.
pub fn push_u64(out: &mut String, n: u64)
    ensures
        final(out)@ == old(out)@ + dec_str(n as nat),
    decreases n,
{
    let ghost before: Seq<char> = out@;
    if n >= 10 {
        push_u64(out, n / 10);
    }
    let d = digit_str(n % 10);
    out.append(d);
    proof {
        if n >= 10 {
            assert(out@ =~= before + dec_str((n / 10) as nat).push(digit_char((n % 10) as int)));
        } else {
            assert(out@ =~= before + seq![digit_char(n as int)]);
        }
    }
}

/// Appends the decimal rendering of `f` to `out`.
pub fn push_frac(out: &mut String, f: Frac)
    requires
        f.bound_wf(),
    ensures
        final(out)@ == old(out)@ + frac_str(f),
{
    let ghost before: Seq<char> = out@;
    let neg = f.num < 0;
    if neg {
        out.append("-");
    }
    let a: u64 = if neg {
        (-f.num) as u64
    } else {
        f.num as u64
    };
    let m: u64 = (a * 1000) / (f.den as u64);
    assert(m == frac_milli(f));
    let r: u64 = m % 1000;
    push_u64(out, m / 1000);
    out.append(".");
    out.append(digit_str(r / 100));
    out.append(digit_str((r / 10) % 10));
    out.append(digit_str(r % 10));
    proof {
        reveal_strlit("-");
        reveal_strlit(".");
        assert(out@ =~= before + frac_str(f));
    }
}

} // verus!
