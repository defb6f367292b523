//! Numbers written in base ten.

use vstd::prelude::*;

verus! {

/// The character that writes the digit `d`.
pub open spec fn digit_char(d: int) -> char {
    ('0' as u32 + d) as char
}

/// `n` written in base ten without leading zeros.
pub open spec fn decimal_text(n: nat) -> Seq<char>
    decreases n,
{
    if n < 10 {
        seq![digit_char(n as int)]
    } else {
        decimal_text(n / 10).push(digit_char((n % 10) as int))
    }
}

/// As many zeros as `text` lacks to `width` characters.
pub open spec fn padding(text: Seq<char>, width: nat) -> Seq<char> {
    Seq::new(
        if text.len() < width {
            (width - text.len()) as nat
        } else {
            0
        },
        |i: int| '0',
    )
}

/// `n` written in base ten with at least `width` digits, the missing ones
/// filled with leading zeros.
pub open spec fn padded_decimal_text(n: nat, width: nat) -> Seq<char> {
    padding(decimal_text(n), width) + decimal_text(n)
}

/// The digits of `n` in base ten.
pub fn decimal_digits(n: u64) -> (digits: Vec<char>)
    ensures
        digits@ == decimal_text(n as nat),
{
    let mut reversed: Vec<char> = Vec::new();
    let mut rest: u64 = n;
    loop
        invariant_except_break
            decimal_text(n as nat) == decimal_text(rest as nat) + reversed@.reverse(),
        ensures
            decimal_text(n as nat) == reversed@.reverse(),
        decreases rest,
    {
        let digit: u8 = (rest % 10) as u8;
        let c: char = (48u8 + digit) as char;
        reversed.push(c);
        if rest < 10 {
            break ;
        }
        rest = rest / 10;
    }
    let mut digits: Vec<char> = Vec::new();
    let mut i: usize = reversed.len();
    while i > 0
        invariant
            i <= reversed.len(),
            digits@ == reversed@.reverse().take(reversed.len() - i),
        decreases i,
    {
        i -= 1;
        digits.push(reversed[i]);
    }
    digits
}

/// Appends the characters of `chars` to `out`.
pub fn push_chars(out: &mut String, chars: &Vec<char>)
    ensures
        final(out)@ == old(out)@ + chars@,
{
    let mut i: usize = 0;
    while i < chars.len()
        invariant
            i <= chars.len(),
            out@ == old(out)@ + chars@.take(i as int),
        decreases chars.len() - i,
    {
        out.push(chars[i]);
        i += 1;
    }
}

/// Appends `n` in base ten to `out`.
pub fn push_decimal(out: &mut String, n: u64)
    ensures
        final(out)@ == old(out)@ + decimal_text(n as nat),
{
    let digits = decimal_digits(n);
    push_chars(out, &digits);
}

/// Appends `n` in base ten to `out`, with leading zeros up to `width`
/// digits.
pub fn push_padded_decimal(out: &mut String, n: u64, width: usize)
    ensures
        final(out)@ == old(out)@ + padded_decimal_text(n as nat, width as nat),
{
    let digits = decimal_digits(n);
    let mut written: usize = digits.len();
    let ghost zeros = padding(digits@, width as nat);
    while written < width
        invariant
            digits.len() <= written,
            written <= width || written == digits.len(),
            zeros == padding(digits@, width as nat),
            out@ == old(out)@ + zeros.take(written - digits.len()),
        decreases width - written,
    {
        out.push('0');
        written += 1;
    }
    push_chars(out, &digits);
}

} // verus!
