//! Decimal text of unsigned numbers, as it appears in dates and messages.

use vstd::prelude::*;

verus! {

/// The character of a single decimal digit `d`, for `0 <= d <= 9`.
pub open spec fn digit_char(d: int) -> char {
    ('0' as int + d) as char
}

/// The decimal digits of `n`, most significant first, with no leading zero
/// (the number zero is the single digit `0`).
pub open spec fn decimal(n: nat) -> Seq<char>
    decreases n,
{
    if n < 10 {
        seq![digit_char(n as int)]
    } else {
        decimal(n / 10).push(digit_char((n % 10) as int))
    }
}

/// The decimal digits of `n`, filled up with a leading zero to at least two
/// characters.
pub open spec fn zero_padded(n: nat) -> Seq<char> {
    if n < 10 {
        seq!['0'] + decimal(n)
    } else {
        decimal(n)
    }
}

/// A number below one hundred, zero-padded, is exactly its tens digit and its
/// units digit.
pub proof fn lemma_zero_padded_two_digits(n: nat)
    requires
        n < 100,
    ensures
        zero_padded(n) == seq![digit_char((n / 10) as int), digit_char((n % 10) as int)],
{
    reveal_with_fuel(decimal, 2);
    assert(zero_padded(n) =~= seq![digit_char((n / 10) as int), digit_char((n % 10) as int)]);
}

/// A number from one thousand up to, but not including, ten thousand, is
/// exactly its four digits.
pub proof fn lemma_decimal_four_digits(n: nat)
    requires
        1000 <= n < 10000,
    ensures
        decimal(n) == seq![
            digit_char((n / 1000) as int),
            digit_char((n / 100 % 10) as int),
            digit_char((n / 10 % 10) as int),
            digit_char((n % 10) as int),
        ],
{
    reveal_with_fuel(decimal, 4);
    assert(decimal(n) =~= seq![
        digit_char((n / 1000) as int),
        digit_char((n / 100 % 10) as int),
        digit_char((n / 10 % 10) as int),
        digit_char((n % 10) as int),
    ]);
}

/// The text of the digit `d`.
fn digit_str(d: u8) -> (s: &'static str)
    requires
        d < 10,
    ensures
        s@ == seq![digit_char(d as int)],
{
    let digits: &'static str = "0123456789";
    proof {
        reveal_strlit("0123456789");
    }
    let s = digits.substring_ascii(d as usize, d as usize + 1);
    assert(s@ =~= seq![digit_char(d as int)]);
    s
}

/// Appends the decimal digits of `n` to `out`.
pub(crate) fn push_decimal(out: &mut String, n: u16)
    ensures
        final(out)@ == old(out)@ + decimal(n as nat),
    decreases n,
{
    if n >= 10 {
        push_decimal(out, n / 10);
    }
    out.append(digit_str((n % 10) as u8));
}

/// Appends the decimal digits of `n` to `out`, after a zero where `n` has a
/// single digit.
pub(crate) fn push_zero_padded(out: &mut String, n: u8)
    ensures
        final(out)@ == old(out)@ + zero_padded(n as nat),
{
    if n < 10 {
        out.append(digit_str(0));
    }
    push_decimal(out, n as u16);
}

} // verus!
