//! Decimal rendering of integers, as used by the reporter.
use vstd::prelude::*;

verus! {

/// The character of a decimal digit.
pub open spec fn digit_char(d: nat) -> char {
    if d == 0 {
        '0'
    } else if d == 1 {
        '1'
    } else if d == 2 {
        '2'
    } else if d == 3 {
        '3'
    } else if d == 4 {
        '4'
    } else if d == 5 {
        '5'
    } else if d == 6 {
        '6'
    } else if d == 7 {
        '7'
    } else if d == 8 {
        '8'
    } else {
        '9'
    }
}

/// `n` in decimal, without leading zeros.
pub open spec fn decimal(n: nat) -> Seq<char>
    decreases n,
{
    if n < 10 {
        seq![digit_char(n)]
    } else {
        decimal(n / 10).push(digit_char(n % 10))
    }
}

/// `n < 100` written with exactly two digits.
pub open spec fn two_digits(n: nat) -> Seq<char> {
    if n < 10 {
        seq!['0'] + decimal(n)
    } else {
        decimal(n)
    }
}

/// `n < 1000` written with exactly three digits.
pub open spec fn three_digits(n: nat) -> Seq<char> {
    if n < 10 {
        seq!['0', '0'] + decimal(n)
    } else if n < 100 {
        seq!['0'] + decimal(n)
    } else {
        decimal(n)
    }
}

/// `h / 100` with two fractional digits.
pub open spec fn hundredths(h: nat) -> Seq<char> {
    decimal(h / 100) + seq!['.'] + two_digits(h % 100)
}

/// `t / 1000` with three fractional digits.
pub open spec fn thousandths(t: nat) -> Seq<char> {
    decimal(t / 1000) + seq!['.'] + three_digits(t % 1000)
}

/// `a / b` rounded to the nearest integer, halves rounded up.
pub open spec fn rounded_div(a: nat, b: nat) -> nat {
    (2 * a + b) / (2 * b)
}

/// `n` in decimal with a comma between each group of three digits.
pub open spec fn grouped_decimal(n: nat) -> Seq<char>
    decreases n,
{
    if n < 1000 {
        decimal(n)
    } else {
        grouped_decimal(n / 1000) + seq![','] + three_digits(n % 1000)
    }
}

fn digit_str(d: u128) -> (r: &'static str)
    requires
        d < 10,
    ensures
        r@ == seq![digit_char(d as nat)],
{
    proof {
        reveal_strlit("0");
        reveal_strlit("1");
        reveal_strlit("2");
        reveal_strlit("3");
        reveal_strlit("4");
        reveal_strlit("5");
        reveal_strlit("6");
        reveal_strlit("7");
        reveal_strlit("8");
        reveal_strlit("9");
    }
    let r = if d == 0 {
        "0"
    } else if d == 1 {
        "1"
    } else if d == 2 {
        "2"
    } else if d == 3 {
        "3"
    } else if d == 4 {
        "4"
    } else if d == 5 {
        "5"
    } else if d == 6 {
        "6"
    } else if d == 7 {
        "7"
    } else if d == 8 {
        "8"
    } else {
        "9"
    };
    assert(r@ =~= seq![digit_char(d as nat)]);
    r
}

/// Appends `n` in decimal to `out`.
pub fn push_decimal(out: &mut String, n: u128)
    ensures
        final(out)@ == old(out)@ + decimal(n as nat),
    decreases n,
{
    if n >= 10 {
        push_decimal(out, n / 10);
    }
    out.append(digit_str(n % 10));
    assert(final(out)@ =~= old(out)@ + decimal(n as nat)) by {
        if n >= 10 {
            assert(decimal(n as nat) == decimal((n / 10) as nat).push(digit_char((n % 10) as nat)));
        }
    }
}

fn push_padded(out: &mut String, n: u128, width: u128)
    requires
        width == 2 || width == 3,
        n < (if width == 2 { 100u128 } else { 1000u128 }),
    ensures
        width == 2 ==> final(out)@ == old(out)@ + two_digits(n as nat),
        width == 3 ==> final(out)@ == old(out)@ + three_digits(n as nat),
{
    proof {
        reveal_strlit("0");
    }
    if width == 3 && n < 100 {
        out.append("0");
    }
    if n < 10 {
        out.append("0");
    }
    push_decimal(out, n);
    proof {
        assert(seq!['0'] + seq!['0'] =~= seq!['0', '0']);
        if width == 2 {
            assert(final(out)@ =~= old(out)@ + two_digits(n as nat));
        } else {
            assert(final(out)@ =~= old(out)@ + three_digits(n as nat));
        }
    }
}

/// Appends `h / 100` with two fractional digits to `out`.
pub fn push_hundredths(out: &mut String, h: u128)
    ensures
        final(out)@ == old(out)@ + hundredths(h as nat),
{
    proof {
        reveal_strlit(".");
    }
    push_decimal(out, h / 100);
    out.append(".");
    push_padded(out, h % 100, 2);
    assert(final(out)@ =~= old(out)@ + hundredths(h as nat));
}

/// Appends `t / 1000` with three fractional digits to `out`.
pub fn push_thousandths(out: &mut String, t: u128)
    ensures
        final(out)@ == old(out)@ + thousandths(t as nat),
{
    proof {
        reveal_strlit(".");
    }
    push_decimal(out, t / 1000);
    out.append(".");
    push_padded(out, t % 1000, 3);
    assert(final(out)@ =~= old(out)@ + thousandths(t as nat));
}

/// `a / b` rounded to the nearest integer, halves rounded up.
pub fn rounded_quotient(a: u128, b: u128) -> (r: u128)
    requires
        b > 0,
        2 * a + b <= u128::MAX,
        2 * b <= u128::MAX,
    ensures
        r == rounded_div(a as nat, b as nat),
{
    (2 * a + b) / (2 * b)
}

} // verus!
