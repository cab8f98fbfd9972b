//! Building blocks for rendering numbers as text: decimal digits, rounding
//! to a given denominator with ties to even, and one-decimal fixed notation.

use vstd::prelude::*;

verus! {

/// The ASCII digit for `d` (which is expected to be below ten).
pub open spec fn digit_char(d: nat) -> char {
    if d == 0 {
        '0'
    } else if d == 1 {
        '1'
    } else if d == 2 {
        '2'
    } else if d == 3 {
        '3'
    } else if d == 4 {
        '4'
    } else if d == 5 {
        '5'
    } else if d == 6 {
        '6'
    } else if d == 7 {
        '7'
    } else if d == 8 {
        '8'
    } else {
        '9'
    }
}

/// The decimal representation of `n`, without leading zeros ("0" for zero).
pub open spec fn decimal(n: nat) -> Seq<char>
    decreases n,
{
    if n < 10 {
        seq![digit_char(n)]
    } else {
        decimal(n / 10).push(digit_char(n % 10))
    }
}

/// The decimal representation of a signed integer: a leading '-' for
/// negative values.
pub open spec fn signed_decimal(n: int) -> Seq<char> {
    if n < 0 {
        seq!['-'] + decimal((-n) as nat)
    } else {
        decimal(n as nat)
    }
}

/// `n / d` rounded to the nearest integer; a tie goes to the even neighbour.
pub open spec fn round_half_even(n: nat, d: nat) -> nat
    recommends
        d > 0,
{
    let q = n / d;
    let r = n % d;
    if r > d - r {
        q + 1
    } else if r < d - r {
        q
    } else if q % 2 == 0 {
        q
    } else {
        q + 1
    }
}

/// A count of tenths written in fixed notation with one decimal:
/// `15` is "1.5", `3` is "0.3".
pub open spec fn tenths_text(t: nat) -> Seq<char> {
    decimal(t / 10).push('.').push(digit_char(t % 10))
}

/// Appends `c` to `s`.
/// Calls `String::push`, whose documentation says that it appends the
/// character to the end of the string; the contract claims exactly that.
#[verifier::external_body]
pub(crate) fn push_char(s: &mut String, c: char)
    ensures
        final(s)@ == old(s)@.push(c),
{
    s.push(c);
}

/// The digit character of `d`.
pub fn digit(d: u64) -> (c: char)
    requires
        d < 10,
    ensures
        c == digit_char(d as nat),
{
    if d == 0 {
        '0'
    } else if d == 1 {
        '1'
    } else if d == 2 {
        '2'
    } else if d == 3 {
        '3'
    } else if d == 4 {
        '4'
    } else if d == 5 {
        '5'
    } else if d == 6 {
        '6'
    } else if d == 7 {
        '7'
    } else if d == 8 {
        '8'
    } else {
        '9'
    }
}

/// Appends the decimal representation of `n` to `s`.
pub fn push_decimal(s: &mut String, n: u64)
    ensures
        final(s)@ == old(s)@ + decimal(n as nat),
    decreases n,
{
    if n >= 10 {
        push_decimal(s, n / 10);
        push_char(s, digit(n % 10));
        assert(s@ =~= old(s)@ + decimal(n as nat));
    } else {
        push_char(s, digit(n));
        assert(s@ =~= old(s)@ + decimal(n as nat));
    }
}

/// Appends the decimal representation of a signed integer to `s`.
pub fn push_signed_decimal(s: &mut String, n: i64)
    ensures
        final(s)@ == old(s)@ + signed_decimal(n as int),
{
    if n < 0 {
        push_char(s, '-');
        let magnitude: u64 = if n == i64::MIN {
            9223372036854775808u64
        } else {
            (-n) as u64
        };
        push_decimal(s, magnitude);
        assert(s@ =~= old(s)@ + signed_decimal(n as int));
    } else {
        push_decimal(s, n as u64);
    }
}

/// Appends a count of tenths in one-decimal fixed notation to `s`.
pub fn push_tenths(s: &mut String, t: u64)
    ensures
        final(s)@ == old(s)@ + tenths_text(t as nat),
{
    push_decimal(s, t / 10);
    push_char(s, '.');
    push_char(s, digit(t % 10));
    assert(s@ =~= old(s)@ + tenths_text(t as nat));
}

/// `n / d` rounded to the nearest integer, ties to even.
pub fn round_half_even_u128(n: u128, d: u128) -> (q: u128)
    requires
        d > 0,
    ensures
        q == round_half_even(n as nat, d as nat),
        q <= n / d + 1,
{
    let q = n / d;
    let r = n % d;
    if r > d - r {
        assert(q < u128::MAX) by (nonlinear_arith)
            requires
                q == n / d,
                d > 1,
        ;
        q + 1
    } else if r < d - r {
        q
    } else if q % 2 == 0 {
        q
    } else {
        assert(q < u128::MAX) by (nonlinear_arith)
            requires
                q == n / d,
                d > 1,
        ;
        q + 1
    }
}

} // verus!
