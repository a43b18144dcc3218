//! Numbers as text.
use crate::fixed::Fixed;
use vstd::prelude::*;

verus! {

/// The character of a decimal digit.
pub open spec fn digit_char(d: int) -> char {
    if d == 0 {
        '0'
    } else if d == 1 {
        '1'
    } else if d == 2 {
        '2'
    } else if d == 3 {
        '3'
    } else if d == 4 {
        '4'
    } else if d == 5 {
        '5'
    } else if d == 6 {
        '6'
    } else if d == 7 {
        '7'
    } else if d == 8 {
        '8'
    } else {
        '9'
    }
}

/// The decimal digits of `n`, without leading zeros.
pub open spec fn decimal_digits(n: nat) -> Seq<char>
    decreases n,
{
    if n < 10 {
        seq![digit_char(n as int)]
    } else {
        decimal_digits(n / 10).push(digit_char((n % 10) as int))
    }
}

/// `n` in decimal, with a minus sign before a negative number.
pub open spec fn decimal_text(n: int) -> Seq<char> {
    if n < 0 {
        seq!['-'] + decimal_digits((-n) as nat)
    } else {
        decimal_digits(n as nat)
    }
}

/// The last `width` decimal digits of `n`, with leading zeros.
pub open spec fn padded_digits(n: nat, width: nat) -> Seq<char>
    decreases width,
{
    if width == 0 {
        Seq::empty()
    } else {
        padded_digits(n / 10, (width - 1) as nat).push(digit_char((n % 10) as int))
    }
}

/// A fixed-point number in decimal: sign, whole part, a point and six digits.
pub open spec fn fixed_text(x: Fixed) -> Seq<char> {
    let magnitude: nat = if x.raw < 0 {
        (-x.raw) as nat
    } else {
        x.raw as nat
    };
    (if x.raw < 0 {
        seq!['-']
    } else {
        Seq::empty()
    }) + decimal_digits(magnitude / 1_000_000) + seq!['.'] + padded_digits(
        magnitude % 1_000_000,
        6,
    )
}

fn digit_str(d: u8) -> (s: &'static str)
    requires
        d < 10,
    ensures
        s@ == seq![digit_char(d as int)],
{
    proof {
        reveal_strlit("0");
        reveal_strlit("1");
        reveal_strlit("2");
        reveal_strlit("3");
        reveal_strlit("4");
        reveal_strlit("5");
        reveal_strlit("6");
        reveal_strlit("7");
        reveal_strlit("8");
        reveal_strlit("9");
    }
    let s = if d == 0 {
        "0"
    } else if d == 1 {
        "1"
    } else if d == 2 {
        "2"
    } else if d == 3 {
        "3"
    } else if d == 4 {
        "4"
    } else if d == 5 {
        "5"
    } else if d == 6 {
        "6"
    } else if d == 7 {
        "7"
    } else if d == 8 {
        "8"
    } else {
        "9"
    };
    assert(s@ =~= seq![digit_char(d as int)]);
    s
}

/// Appends the decimal digits of `n` to `out`.
pub fn push_digits(out: &mut String, n: u128)
    ensures
        final(out)@ == old(out)@ + decimal_digits(n as nat),
    decreases n,
{
    if n >= 10 {
        push_digits(out, n / 10);
    }
    let ghost mid = out@;
    out.append(digit_str((n % 10) as u8));
    proof {
        if n >= 10 {
            assert(out@ =~= old(out)@ + decimal_digits(n as nat));
        } else {
            assert(out@ =~= old(out)@ + decimal_digits(n as nat));
        }
    }
}

/// Appends the last `width` decimal digits of `n` to `out`, with leading zeros.
pub fn push_padded(out: &mut String, n: u128, width: u32)
    ensures
        final(out)@ == old(out)@ + padded_digits(n as nat, width as nat),
    decreases width,
{
    if width > 0 {
        push_padded(out, n / 10, width - 1);
        out.append(digit_str((n % 10) as u8));
        proof {
            assert(out@ =~= old(out)@ + padded_digits(n as nat, width as nat));
        }
    } else {
        proof {
            assert(out@ =~= old(out)@ + padded_digits(n as nat, width as nat));
        }
    }
}

/// Appends `n` in decimal to `out`.
pub fn push_decimal(out: &mut String, n: i64)
    ensures
        final(out)@ == old(out)@ + decimal_text(n as int),
{
    if n < 0 {
        proof {
            reveal_strlit("-");
        }
        out.append("-");
        let ghost mid = out@;
        push_digits(out, (-(n as i128)) as u128);
        proof {
            assert(mid =~= old(out)@ + seq!['-']);
            assert(out@ =~= old(out)@ + decimal_text(n as int));
        }
    } else {
        push_digits(out, n as u128);
    }
}

/// Appends a fixed-point number in decimal to `out`.
pub fn push_fixed(out: &mut String, x: Fixed)
    ensures
        final(out)@ == old(out)@ + fixed_text(x),
{
    let magnitude: u128 = if x.raw < 0 {
        (-(x.raw as i128)) as u128
    } else {
        x.raw as u128
    };
    proof {
        reveal_strlit("-");
        reveal_strlit(".");
    }
    if x.raw < 0 {
        out.append("-");
    }
    push_digits(out, magnitude / 1_000_000);
    out.append(".");
    push_padded(out, magnitude % 1_000_000, 6);
    proof {
        assert(out@ =~= old(out)@ + fixed_text(x));
    }
}

} // verus!
